use vstd::prelude::*;

verus! {

/// A field that failed validation, with the value that was offered.
#[derive(Debug, Clone)]
pub enum Invalid {
    FontSize(u32),
    FontFamily(String),
    ReadingMode(String),
    Version(String),
}

/// What a store operation can fail with.
#[derive(Debug, Clone)]
pub enum StoreError {
    /// A file or directory could not be read or written.
    Io(String),
    /// A required file does not hold the expected JSON document.
    Parse(String),
    /// A value lies outside its allowed domain; nothing was written.
    Validation(Invalid),
    /// The referenced book or preset does not exist.
    NotFound(String),
}

pub open spec fn field_name_of(v: Invalid) -> Seq<char> {
    match v {
        Invalid::FontSize(_) => "fontSize"@,
        Invalid::FontFamily(_) => "fontFamily"@,
        Invalid::ReadingMode(_) => "readingMode"@,
        Invalid::Version(_) => "version"@,
    }
}

impl Invalid {
    /// The name of the offending field, as it is spelled in the stored JSON.
    pub fn field(&self) -> (r: String)
        ensures
            r@ == field_name_of(*self),
    {
        match self {
            Invalid::FontSize(_) => String::from_str("fontSize"),
            Invalid::FontFamily(_) => String::from_str("fontFamily"),
            Invalid::ReadingMode(_) => String::from_str("readingMode"),
            Invalid::Version(_) => String::from_str("version"),
        }
    }
}

} // verus!
