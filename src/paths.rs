use vstd::prelude::*;

verus! {

/// `child` placed under the directory `dir`, as path joining does for a
/// relative child.
pub open spec fn joined(dir: Seq<char>, child: Seq<char>) -> Seq<char> {
    if dir.len() == 0 {
        child
    } else if dir.last() == '/' {
        dir + child
    } else {
        dir + "/"@ + child
    }
}

/// Joins the relative path `child` under `dir`.
pub fn join(dir: &str, child: &str) -> (r: String)
    ensures
        r@ == joined(dir@, child@),
{
    let n = dir.unicode_len();
    if n == 0 {
        String::from_str(child)
    } else if dir.get_char(n - 1) == '/' {
        String::from_str(dir).concat(child)
    } else {
        String::from_str(dir).concat("/").concat(child)
    }
}

/// The application's storage root under the home directory `home`.
pub fn get_app_dir(home: &str) -> (r: String)
    ensures
        r@ == joined(home@, ".epub-reader"@),
{
    join(home, ".epub-reader")
}

/// Where each store keeps its files, derived once from the home directory
/// and handed to every operation.
#[derive(Debug, Clone, PartialEq)]
pub struct StoreLayout {
    pub root: String,
}

impl StoreLayout {
    /// The layout rooted at `<home>/.epub-reader`.
    pub fn new(home: &str) -> (r: StoreLayout)
        ensures
            r.root@ == joined(home@, ".epub-reader"@),
    {
        StoreLayout { root: get_app_dir(home) }
    }

    pub fn library_file(&self) -> (r: String)
        ensures
            r@ == joined(self.root@, "library.json"@),
    {
        join(self.root.as_str(), "library.json")
    }

    pub fn preferences_file(&self) -> (r: String)
        ensures
            r@ == joined(self.root@, "preferences.json"@),
    {
        join(self.root.as_str(), "preferences.json")
    }

    pub fn presets_dir(&self) -> (r: String)
        ensures
            r@ == joined(self.root@, "presets"@),
    {
        join(self.root.as_str(), "presets")
    }

    pub fn backgrounds_dir(&self) -> (r: String)
        ensures
            r@ == joined(self.root@, "media/backgrounds"@),
    {
        join(self.root.as_str(), "media/backgrounds")
    }

    pub fn covers_dir(&self) -> (r: String)
        ensures
            r@ == joined(self.root@, "cache/covers"@),
    {
        join(self.root.as_str(), "cache/covers")
    }
}

} // verus!
