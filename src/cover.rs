use vstd::prelude::*;
use crate::text::{has_prefix, same_text, starts_with_text};

verus! {

/// An image together with its declared MIME type.
#[derive(Debug, Clone, PartialEq)]
pub struct CoverImage {
    pub data: Vec<u8>,
    pub mime: String,
}

/// One entry of a document's resource index. `data` is absent when the
/// resource is listed but could not be read.
#[derive(Debug, Clone, PartialEq)]
pub struct Resource {
    pub id: String,
    pub mime: String,
    pub data: Option<Vec<u8>>,
}

/// What an opened document exposes for finding its cover.
#[derive(Debug, Clone, PartialEq)]
pub struct CoverSource {
    /// The cover declared through the document's metadata, if resolved.
    pub declared: Option<CoverImage>,
    /// The identifier the metadata names as the cover, if any.
    pub cover_id: Option<String>,
    /// Every resource, in the order the document lists them.
    pub resources: Vec<Resource>,
}

pub open spec fn image_of(r: Resource) -> Option<CoverImage> {
    match r.data {
        Some(d) => Some(CoverImage { data: d, mime: r.mime }),
        None => None,
    }
}

/// The resource-by-id lookup: the image of the first resource named `id`.
pub open spec fn lookup(res: Seq<Resource>, id: Seq<char>) -> Option<CoverImage>
    decreases res.len(),
{
    if res.len() == 0 {
        None
    } else if res[0].id@ == id {
        image_of(res[0])
    } else {
        lookup(res.skip(1), id)
    }
}

/// The first readable resource whose MIME type begins with `image/`.
pub open spec fn first_image(res: Seq<Resource>) -> Option<CoverImage>
    decreases res.len(),
{
    if res.len() == 0 {
        None
    } else if has_prefix(res[0].mime@, "image/"@) && res[0].data is Some {
        image_of(res[0])
    } else {
        first_image(res.skip(1))
    }
}

/// The first of the conventional cover identifiers that resolves.
pub open spec fn conventional(res: Seq<Resource>) -> Option<CoverImage> {
    if lookup(res, "cover-image"@) is Some {
        lookup(res, "cover-image"@)
    } else if lookup(res, "cover"@) is Some {
        lookup(res, "cover"@)
    } else if lookup(res, "Cover"@) is Some {
        lookup(res, "Cover"@)
    } else if lookup(res, "CoverImage"@) is Some {
        lookup(res, "CoverImage"@)
    } else {
        lookup(res, "coverimage"@)
    }
}

/// The cover chosen for a document: the declared cover, else the resource
/// named by the cover id, else a conventional identifier, else the first
/// image resource. Absent when every strategy fails.
pub open spec fn chosen_cover(src: CoverSource) -> Option<CoverImage> {
    let res = src.resources@;
    if src.declared is Some {
        src.declared
    } else if src.cover_id is Some && lookup(res, src.cover_id->0@) is Some {
        lookup(res, src.cover_id->0@)
    } else if conventional(res) is Some {
        conventional(res)
    } else {
        first_image(res)
    }
}

/// The index of the first resource named `id`.
fn find_resource(res: &Vec<Resource>, id: &str) -> (r: Option<usize>)
    ensures
        match r {
            Some(i) => i < res@.len() && lookup(res@, id@) == image_of(res@[i as int]),
            None => lookup(res@, id@) is None,
        },
{
    let mut i: usize = 0;
    assert(res@.skip(0) == res@);
    while i < res.len()
        invariant
            i <= res@.len(),
            lookup(res@, id@) == lookup(res@.skip(i as int), id@),
        decreases res@.len() - i,
    {
        let ghost rest = res@.skip(i as int);
        assert(rest[0] == res@[i as int]);
        if same_text(res[i].id.as_str(), id) {
            return Some(i);
        }
        assert(rest.skip(1) == res@.skip(i + 1));
        i += 1;
    }
    None
}

/// The index of the first readable image resource.
fn find_image(res: &Vec<Resource>) -> (r: Option<usize>)
    ensures
        match r {
            Some(i) => i < res@.len() && first_image(res@) == image_of(res@[i as int])
                && first_image(res@) is Some,
            None => first_image(res@) is None,
        },
{
    let mut i: usize = 0;
    assert(res@.skip(0) == res@);
    while i < res.len()
        invariant
            i <= res@.len(),
            first_image(res@) == first_image(res@.skip(i as int)),
        decreases res@.len() - i,
    {
        let ghost rest = res@.skip(i as int);
        assert(rest[0] == res@[i as int]);
        if starts_with_text(res[i].mime.as_str(), "image/") && res[i].data.is_some() {
            return Some(i);
        }
        assert(rest.skip(1) == res@.skip(i + 1));
        i += 1;
    }
    None
}

/// Takes the image out of the resource at `i`.
fn take_image(res: Vec<Resource>, i: usize) -> (r: Option<CoverImage>)
    requires
        i < res@.len(),
    ensures
        r == image_of(res@[i as int]),
{
    let mut res = res;
    let item = res.swap_remove(i);
    match item.data {
        Some(d) => Some(CoverImage { data: d, mime: item.mime }),
        None => None,
    }
}

/// Finds a cover image by the ordered chain of strategies: the first that
/// succeeds wins and no later one is tried.
pub fn extract_cover(src: CoverSource) -> (r: Option<CoverImage>)
    ensures
        r == chosen_cover(src),
{
    let ghost g = src;
    let CoverSource { declared, cover_id, resources } = src;
    if declared.is_some() {
        return declared;
    }
    if let Some(cid) = cover_id {
        if let Some(i) = find_resource(&resources, cid.as_str()) {
            if resources[i].data.is_some() {
                return take_image(resources, i);
            }
        }
    }
    let names = ["cover-image", "cover", "Cover", "CoverImage", "coverimage"];
    let mut k: usize = 0;
    while k < 5
        invariant
            0 <= k <= 5,
            g == src,
            resources@ == g.resources@,
            g.declared is None,
            !(g.cover_id is Some && lookup(resources@, g.cover_id->0@) is Some),
            names@ == seq!["cover-image", "cover", "Cover", "CoverImage", "coverimage"],
            forall|j: int| 0 <= j < k ==> lookup(resources@, (#[trigger] names@[j])@) is None,
        decreases 5 - k,
    {
        if let Some(i) = find_resource(&resources, names[k]) {
            if resources[i].data.is_some() {
                assert(lookup(resources@, names@[k as int]@) is Some);
                assert(conventional(resources@) == lookup(resources@, names@[k as int]@));
                assert(chosen_cover(g) == conventional(g.resources@));
                return take_image(resources, i);
            }
        }
        k += 1;
    }
    match find_image(&resources) {
        Some(i) => take_image(resources, i),
        None => None,
    }
}

/// The file extension for a cover of the given MIME type; unknown types
/// fall back to `jpg`.
pub open spec fn extension_of(mime: Seq<char>) -> Seq<char> {
    if mime == "image/png"@ {
        "png"@
    } else if mime == "image/gif"@ {
        "gif"@
    } else if mime == "image/webp"@ {
        "webp"@
    } else {
        "jpg"@
    }
}

/// The file extension for a cover of type `mime`.
pub fn cover_extension(mime: &str) -> (r: String)
    ensures
        r@ == extension_of(mime@),
{
    if same_text(mime, "image/png") {
        String::from_str("png")
    } else if same_text(mime, "image/gif") {
        String::from_str("gif")
    } else if same_text(mime, "image/webp") {
        String::from_str("webp")
    } else {
        String::from_str("jpg")
    }
}

/// The name of the cover file of book `book_id` in the covers directory:
/// `<book_id>.<extension>`.
pub fn cover_file_name(book_id: &str, mime: &str) -> (r: String)
    ensures
        r@ == book_id@ + "."@ + extension_of(mime@),
{
    let ext = cover_extension(mime);
    String::from_str(book_id).concat(".").concat(ext.as_str())
}

/// The cover file to write for book `book_id`, named after the book and
/// the image type, with the bytes to put in it; absent when the document
/// offers no cover.
pub fn cover_to_write(book_id: &str, src: CoverSource) -> (r: Option<(String, Vec<u8>)>)
    ensures
        match chosen_cover(src) {
            Some(img) => r matches Some((name, data)) && name@ == book_id@ + "."@
                + extension_of(img.mime@) && data == img.data,
            None => r is None,
        },
{
    match extract_cover(src) {
        Some(img) => {
            let name = cover_file_name(book_id, img.mime.as_str());
            Some((name, img.data))
        },
        None => None,
    }
}

} // verus!
