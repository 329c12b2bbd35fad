use vstd::prelude::*;
use crate::error::{Invalid, StoreError};
use crate::text::same_text;

verus! {

#[derive(Debug, Clone, PartialEq)]
pub struct BackgroundConfig {
    pub bg_type: String,
    pub path: Option<String>,
}

#[derive(Debug, Clone, PartialEq)]
pub struct OverlayConfig {
    pub color: String,
    /// Opacity, carried as the bit pattern of an IEEE-754 single.
    pub opacity: u32,
}

/// Reader panel settings. Every field after `background_color` was added in
/// a later schema and is absent in older presets.
#[derive(Debug, Clone, PartialEq)]
pub struct ReaderConfig {
    /// Opacity, carried as the bit pattern of an IEEE-754 single.
    pub opacity: u32,
    pub background_color: String,
    pub text_color: Option<String>,
    pub font_family: Option<String>,
    pub font_size: Option<u32>,
    pub reading_mode: Option<String>,
    pub glassmorphism: Option<bool>,
    pub glass_blur: Option<u32>,
    pub scrollbar_track: Option<String>,
    pub scrollbar_thumb: Option<String>,
}

/// A named visual preset.
#[derive(Debug, Clone, PartialEq)]
pub struct Preset {
    pub version: String,
    pub name: String,
    pub author: Option<String>,
    pub description: Option<String>,
    pub background: BackgroundConfig,
    pub overlay: OverlayConfig,
    pub reader: ReaderConfig,
}

/// The schema versions this store reads and writes.
pub open spec fn version_supported(v: Seq<char>) -> bool {
    v == "1.0"@ || v == "2.0"@
}

/// The outcome of validating a preset: only its version is checked.
pub open spec fn preset_verdict(p: Preset) -> Result<(), StoreError> {
    if version_supported(p.version@) {
        Ok(())
    } else {
        Err(StoreError::Validation(Invalid::Version(p.version)))
    }
}

/// Checks that `preset` has a supported schema version; no other field is
/// checked, so optional fields may be added freely.
pub fn validate_preset(preset: &Preset) -> (r: Result<(), StoreError>)
    ensures
        r == preset_verdict(*preset),
{
    let v = preset.version.as_str();
    if same_text(v, "1.0") || same_text(v, "2.0") {
        Ok(())
    } else {
        Err(StoreError::Validation(Invalid::Version(preset.version.clone())))
    }
}

/// The file that holds the preset `name`: `<name>.json`.
pub fn preset_file_name(name: &str) -> (r: String)
    ensures
        r@ == name@ + ".json"@,
{
    String::from_str(name).concat(".json")
}

/// Loads the preset `name` from what was read: `None` when its file does
/// not exist, else the decoded preset or the decoder's message. Fails with
/// `NotFound`, `Parse` or a version `Validation` error, in that order.
pub fn load_preset(name: &str, decoded: Option<Result<Preset, String>>) -> (r: Result<
    Preset,
    StoreError,
>)
    ensures
        match decoded {
            None => r matches Err(StoreError::NotFound(n)) && n@ == name@,
            Some(Err(msg)) => r == Err::<Preset, StoreError>(StoreError::Parse(msg)),
            Some(Ok(p)) => match preset_verdict(p) {
                Ok(_) => r == Ok::<Preset, StoreError>(p),
                Err(e) => r == Err::<Preset, StoreError>(e),
            },
        },
{
    match decoded {
        None => Err(StoreError::NotFound(String::from_str(name))),
        Some(Err(msg)) => Err(StoreError::Parse(msg)),
        Some(Ok(p)) => match validate_preset(&p) {
            Ok(()) => Ok(p),
            Err(e) => Err(e),
        },
    }
}

/// Prepares the preset `name` for saving from the decoded payload: the
/// payload's own name is replaced by `name`, then the version is checked.
/// On success the returned preset is what must be written to
/// `preset_file_name(name)`.
pub fn save_custom_preset(name: String, decoded: Result<Preset, String>) -> (r: Result<
    Preset,
    StoreError,
>)
    ensures
        match decoded {
            Err(msg) => r == Err::<Preset, StoreError>(StoreError::Parse(msg)),
            Ok(p) => {
                let named = Preset { name: name, ..p };
                match preset_verdict(named) {
                    Ok(_) => r == Ok::<Preset, StoreError>(named),
                    Err(e) => r == Err::<Preset, StoreError>(e),
                }
            },
        },
{
    match decoded {
        Err(msg) => Err(StoreError::Parse(msg)),
        Ok(p) => {
            let mut p = p;
            p.name = name;
            match validate_preset(&p) {
                Ok(()) => Ok(p),
                Err(e) => Err(e),
            }
        },
    }
}

/// Deleting the preset `name` is allowed only when its file exists.
pub fn delete_preset(name: &str, exists: bool) -> (r: Result<(), StoreError>)
    ensures
        exists ==> r is Ok,
        !exists ==> (r matches Err(StoreError::NotFound(n)) && n@ == name@),
{
    if exists {
        Ok(())
    } else {
        Err(StoreError::NotFound(String::from_str(name)))
    }
}

} // verus!
