use reader_store::cover::{
    cover_extension, cover_file_name, extract_cover, CoverImage, CoverSource, Resource,
};

fn res(id: &str, mime: &str, data: Option<Vec<u8>>) -> Resource {
    Resource { id: id.to_string(), mime: mime.to_string(), data }
}

#[test]
fn scan_finds_unconventional_png() {
    let src = CoverSource {
        declared: None,
        cover_id: None,
        resources: vec![
            res("chapter1", "application/xhtml+xml", Some(vec![1])),
            res("img_0042", "image/png", Some(vec![9, 8, 7])),
        ],
    };
    let c = extract_cover(src).expect("a cover");
    assert_eq!(c.data, vec![9, 8, 7]);
    assert_eq!(c.mime, "image/png");
    let name = cover_file_name("abc", &c.mime);
    assert_eq!(name, "abc.png");
    assert!(name.ends_with(".png"));
}

#[test]
fn declared_cover_wins() {
    let src = CoverSource {
        declared: Some(CoverImage { data: vec![1], mime: "image/gif".to_string() }),
        cover_id: Some("cover".to_string()),
        resources: vec![res("cover", "image/png", Some(vec![2]))],
    };
    assert_eq!(extract_cover(src).unwrap().data, vec![1]);
}

#[test]
fn cover_id_before_conventional_names() {
    let src = CoverSource {
        declared: None,
        cover_id: Some("x1".to_string()),
        resources: vec![
            res("cover", "image/png", Some(vec![2])),
            res("x1", "image/jpeg", Some(vec![3])),
        ],
    };
    assert_eq!(extract_cover(src).unwrap().data, vec![3]);
}

#[test]
fn conventional_names_in_order() {
    let src = CoverSource {
        declared: None,
        cover_id: Some("missing".to_string()),
        resources: vec![
            res("pic", "image/png", Some(vec![1])),
            res("Cover", "image/png", Some(vec![2])),
            res("cover", "image/webp", Some(vec![3])),
        ],
    };
    let c = extract_cover(src).unwrap();
    assert_eq!(c.data, vec![3]);
    assert_eq!(c.mime, "image/webp");
}

#[test]
fn unreadable_image_skipped_in_scan() {
    let src = CoverSource {
        declared: None,
        cover_id: None,
        resources: vec![
            res("a", "image/jpeg", None),
            res("b", "text/css", Some(vec![0])),
            res("c", "image/gif", Some(vec![4])),
        ],
    };
    assert_eq!(extract_cover(src).unwrap().data, vec![4]);
}

#[test]
fn no_image_gives_none() {
    let src = CoverSource {
        declared: None,
        cover_id: None,
        resources: vec![res("a", "text/html", Some(vec![0])), res("b", "imagex/png", Some(vec![0]))],
    };
    assert!(extract_cover(src).is_none());
    let empty = CoverSource { declared: None, cover_id: None, resources: vec![] };
    assert!(extract_cover(empty).is_none());
}

#[test]
fn extension_per_mime() {
    assert_eq!(cover_extension("image/jpeg"), "jpg");
    assert_eq!(cover_extension("image/png"), "png");
    assert_eq!(cover_extension("image/gif"), "gif");
    assert_eq!(cover_extension("image/webp"), "webp");
    assert_eq!(cover_extension("image/svg+xml"), "jpg");
    assert_eq!(cover_file_name("id9", "image/gif"), "id9.gif");
}

#[test]
fn cover_to_write_names_file_after_book() {
    let src = CoverSource {
        declared: None,
        cover_id: None,
        resources: vec![res("cover-image", "image/jpeg", Some(vec![5, 6]))],
    };
    let (name, data) = reader_store::cover::cover_to_write("b1", src).unwrap();
    assert_eq!(name, "b1.jpg");
    assert_eq!(data, vec![5, 6]);
    let none = CoverSource { declared: None, cover_id: None, resources: vec![] };
    assert!(reader_store::cover::cover_to_write("b1", none).is_none());
}
