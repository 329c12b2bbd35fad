use vstd::prelude::*;
use crate::error::{Invalid, StoreError};
use crate::text::same_text;

verus! {

pub fn default_reading_mode() -> (r: String)
    ensures
        r@ == "paginated"@,
{
    String::from_str("paginated")
}

pub fn default_text_color() -> (r: String)
    ensures
        r@ == "#1a1a1a"@,
{
    String::from_str("#1a1a1a")
}

pub fn default_container_color() -> (r: String)
    ensures
        r@ == "#FFFFFF"@,
{
    String::from_str("#FFFFFF")
}

pub fn default_container_opacity() -> (r: u32)
    ensures
        r == 95,
{
    95
}

pub fn default_glass_blur() -> (r: u32)
    ensures
        r == 12,
{
    12
}

pub fn default_scrollbar_track() -> (r: String)
    ensures
        r@ == "transparent"@,
{
    String::from_str("transparent")
}

pub fn default_scrollbar_thumb() -> (r: String)
    ensures
        r@ == "rgba(255, 255, 255, 0.25)"@,
{
    String::from_str("rgba(255, 255, 255, 0.25)")
}

pub fn default_true() -> (r: bool)
    ensures
        r,
{
    true
}

pub fn default_music_volume() -> (r: u32)
    ensures
        r == 50,
{
    50
}

/// The single record of user display and audio preferences.
#[derive(Debug, Clone, PartialEq)]
pub struct UserPreferences {
    pub font_family: String,
    pub font_size: u32,
    pub last_preset: Option<String>,
    pub reading_mode: String,
    pub text_color: String,
    pub container_color: String,
    pub container_opacity: u32,
    pub glassmorphism: bool,
    pub glass_blur: u32,
    pub bg_media_path: Option<String>,
    pub bg_audio_muted: bool,
    pub bg_music_path: Option<String>,
    pub bg_music_volume: u32,
    pub bg_music_muted: bool,
    pub scrollbar_track: String,
    pub scrollbar_thumb: String,
}

/// The record used when nothing usable is stored.
pub open spec fn is_default_prefs(p: UserPreferences) -> bool {
    &&& p.font_family@ == "serif"@
    &&& p.font_size == 18
    &&& p.last_preset is Some && p.last_preset->0@ == "Cozy Reading"@
    &&& p.reading_mode@ == "paginated"@
    &&& p.text_color@ == "#1a1a1a"@
    &&& p.container_color@ == "#FFFFFF"@
    &&& p.container_opacity == 95
    &&& !p.glassmorphism
    &&& p.glass_blur == 12
    &&& p.bg_media_path is None
    &&& p.bg_audio_muted
    &&& p.bg_music_path is None
    &&& p.bg_music_volume == 50
    &&& p.bg_music_muted
    &&& p.scrollbar_track@ == "transparent"@
    &&& p.scrollbar_thumb@ == "rgba(255, 255, 255, 0.25)"@
}

impl Default for UserPreferences {
    fn default() -> (r: Self)
        ensures
            is_default_prefs(r),
    {
        UserPreferences {
            font_family: String::from_str("serif"),
            font_size: 18,
            last_preset: Some(String::from_str("Cozy Reading")),
            reading_mode: default_reading_mode(),
            text_color: default_text_color(),
            container_color: default_container_color(),
            container_opacity: default_container_opacity(),
            glassmorphism: false,
            glass_blur: default_glass_blur(),
            bg_media_path: None,
            bg_audio_muted: default_true(),
            bg_music_path: None,
            bg_music_volume: default_music_volume(),
            bg_music_muted: default_true(),
            scrollbar_track: default_scrollbar_track(),
            scrollbar_thumb: default_scrollbar_thumb(),
        }
    }
}

pub open spec fn font_size_ok(n: u32) -> bool {
    12 <= n <= 32
}

pub open spec fn font_family_ok(f: Seq<char>) -> bool {
    f == "serif"@ || f == "sans-serif"@ || f == "monospace"@
}

pub open spec fn reading_mode_ok(m: Seq<char>) -> bool {
    m == "paginated"@ || m == "scrolled"@
}

/// The outcome of validating `p`: the first failing check, in the order
/// font size, font family, reading mode, names the field and its value.
pub open spec fn prefs_verdict(p: UserPreferences) -> Result<(), Invalid> {
    if !font_size_ok(p.font_size) {
        Err(Invalid::FontSize(p.font_size))
    } else if !font_family_ok(p.font_family@) {
        Err(Invalid::FontFamily(p.font_family))
    } else if !reading_mode_ok(p.reading_mode@) {
        Err(Invalid::ReadingMode(p.reading_mode))
    } else {
        Ok(())
    }
}

/// Checks `prefs` before it may be written.
pub fn validate_preferences(prefs: &UserPreferences) -> (r: Result<(), Invalid>)
    ensures
        r == prefs_verdict(*prefs),
{
    if prefs.font_size < 12 || prefs.font_size > 32 {
        return Err(Invalid::FontSize(prefs.font_size));
    }
    let f = prefs.font_family.as_str();
    if !(same_text(f, "serif") || same_text(f, "sans-serif") || same_text(f, "monospace")) {
        return Err(Invalid::FontFamily(prefs.font_family.clone()));
    }
    let m = prefs.reading_mode.as_str();
    if !(same_text(m, "paginated") || same_text(m, "scrolled")) {
        return Err(Invalid::ReadingMode(prefs.reading_mode.clone()));
    }
    Ok(())
}

/// The preferences in effect: what was read and decoded, or the defaults
/// when the file is absent or could not be decoded.
pub fn get_preferences(stored: Option<UserPreferences>) -> (r: UserPreferences)
    ensures
        match stored {
            Some(p) => r == p,
            None => is_default_prefs(r),
        },
{
    match stored {
        Some(p) => p,
        None => UserPreferences::default(),
    }
}

/// Validates `prefs` and hands back the record to write in full, or the
/// first violation, in which case nothing may be written.
pub fn set_preferences(prefs: UserPreferences) -> (r: Result<UserPreferences, StoreError>)
    ensures
        match prefs_verdict(prefs) {
            Ok(_) => r == Ok::<UserPreferences, StoreError>(prefs),
            Err(e) => r == Err::<UserPreferences, StoreError>(StoreError::Validation(e)),
        },
{
    match validate_preferences(&prefs) {
        Ok(()) => Ok(prefs),
        Err(e) => Err(StoreError::Validation(e)),
    }
}

} // verus!
