use vstd::prelude::*;
use crate::text::same_text;

verus! {

/// A regular file found in a directory, split the way paths split: the
/// full path, the name without its extension, and the extension.
#[derive(Debug, Clone, PartialEq)]
pub struct DirFile {
    pub path: String,
    pub stem: Option<String>,
    pub extension: Option<String>,
}

/// What `str::to_lowercase` makes of a text.
pub uninterp spec fn lower_of(s: Seq<char>) -> Seq<char>;

/// Relies on `str::to_lowercase`: the result depends on the characters of
/// `s` alone.
#[verifier::external_body]
fn lowercase(s: &str) -> (r: String)
    ensures
        r@ == lower_of(s@),
{
    s.to_lowercase()
}

/// The preset names among `files`: the stems of the `.json` files, in order.
pub open spec fn preset_names(files: Seq<DirFile>) -> Seq<String>
    decreases files.len(),
{
    if files.len() == 0 {
        Seq::empty()
    } else {
        let f = files.last();
        let rest = preset_names(files.drop_last());
        if f.extension is Some && f.extension->0@ == "json"@ && f.stem is Some {
            rest.push(f.stem->0)
        } else {
            rest
        }
    }
}

/// The names of the presets stored as `files`.
pub fn list_presets(files: &Vec<DirFile>) -> (r: Vec<String>)
    ensures
        r@ == preset_names(files@),
{
    let mut names: Vec<String> = Vec::new();
    let mut i: usize = 0;
    while i < files.len()
        invariant
            i <= files@.len(),
            names@ == preset_names(files@.take(i as int)),
        decreases files@.len() - i,
    {
        assert(files@.take(i + 1).drop_last() == files@.take(i as int));
        let f = &files[i];
        if let Some(ext) = &f.extension {
            if same_text(ext.as_str(), "json") {
                if let Some(stem) = &f.stem {
                    names.push(stem.clone());
                }
            }
        }
        i += 1;
    }
    assert(files@.take(files@.len() as int) == files@);
    names
}

/// Extensions, in lower case, of the background images offered.
pub open spec fn background_ext_ok(lower: Seq<char>) -> bool {
    lower == "jpg"@ || lower == "jpeg"@ || lower == "png"@ || lower == "webp"@ || lower
        == "svg"@
}

/// Whether an extension already in lower case is one of a background image.
pub fn background_ext_allowed(lower: &str) -> (r: bool)
    ensures
        r == background_ext_ok(lower@),
{
    same_text(lower, "jpg") || same_text(lower, "jpeg") || same_text(lower, "png") || same_text(
        lower,
        "webp",
    ) || same_text(lower, "svg")
}

/// The background images among `files`: the paths of those whose extension,
/// ignoring case, is an image one, in order.
pub open spec fn background_paths(files: Seq<DirFile>) -> Seq<String>
    decreases files.len(),
{
    if files.len() == 0 {
        Seq::empty()
    } else {
        let f = files.last();
        let rest = background_paths(files.drop_last());
        if f.extension is Some && background_ext_ok(lower_of(f.extension->0@)) {
            rest.push(f.path)
        } else {
            rest
        }
    }
}

/// The paths of the background images stored as `files`.
pub fn list_backgrounds(files: &Vec<DirFile>) -> (r: Vec<String>)
    ensures
        r@ == background_paths(files@),
{
    let mut paths: Vec<String> = Vec::new();
    let mut i: usize = 0;
    while i < files.len()
        invariant
            i <= files@.len(),
            paths@ == background_paths(files@.take(i as int)),
        decreases files@.len() - i,
    {
        assert(files@.take(i + 1).drop_last() == files@.take(i as int));
        let f = &files[i];
        if let Some(ext) = &f.extension {
            let lower = lowercase(ext.as_str());
            if background_ext_allowed(lower.as_str()) {
                paths.push(f.path.clone());
            }
        }
        i += 1;
    }
    assert(files@.take(files@.len() as int) == files@);
    paths
}

} // verus!
