use jinwonkim_art::error::Error;
use jinwonkim_art::paths::{components_of, is_within, join, render, resolve_inside};
use jinwonkim_art::static_files::{path_under, ImageStore, Root, StaticFiles};
use jinwonkim_art::thumbs::{make_thumbnail, thumbnail_size, ImageRectangle};
use jinwonkim_art::upload::{new_upload_filename, upload_extension, upload_filename};

fn png(width: u32, height: u32) -> Vec<u8> {
    let img = image::DynamicImage::ImageRgba8(image::RgbaImage::new(width, height));
    let mut out = std::io::Cursor::new(Vec::new());
    img.write_to(&mut out, image::ImageFormat::Png).unwrap();
    out.into_inner()
}

#[test]
fn wide_and_tall_thumbnails_keep_aspect_ratio() {
    let wide = make_thumbnail(&png(800, 400), None).unwrap();
    assert_eq!((wide.width(), wide.height()), (400, 200));
    assert_eq!((wide.pixels().width(), wide.pixels().height()), (400, 200));
    let tall = make_thumbnail(&png(400, 800), None).unwrap();
    assert_eq!((tall.width(), tall.height()), (200, 400));
}

#[test]
fn thumbnail_sizes_truncate() {
    assert_eq!(thumbnail_size(800, 400), (400, 200));
    assert_eq!(thumbnail_size(400, 800), (200, 400));
    assert_eq!(thumbnail_size(300, 300), (400, 400));
    assert_eq!(thumbnail_size(1000, 333), (400, 133));
    assert_eq!(thumbnail_size(333, 1000), (133, 400));
    assert_eq!(thumbnail_size(1000, 1), (400, 0));
    assert_eq!(thumbnail_size(0, 0), (0, 400));
    assert_eq!(thumbnail_size(u32::MAX, u32::MAX - 1), (400, 399));
}

#[test]
fn crop_then_scale() {
    let rect = ImageRectangle { x: 100, y: 50, width: 200, height: 100 };
    let t = make_thumbnail(&png(800, 400), Some(rect)).unwrap();
    assert_eq!((t.width(), t.height()), (400, 200));
    let rect = ImageRectangle { x: 0, y: 0, width: 800, height: 400 };
    assert!(make_thumbnail(&png(800, 400), Some(rect)).is_ok());
    let rect = ImageRectangle { x: 300, y: 0, width: 100, height: 400 };
    let t = make_thumbnail(&png(800, 400), Some(rect)).unwrap();
    assert_eq!((t.width(), t.height()), (100, 400));
}

#[test]
fn crop_outside_the_image_is_refused() {
    let rect = ImageRectangle { x: 700, y: 0, width: 200, height: 100 };
    assert_eq!(make_thumbnail(&png(800, 400), Some(rect)).err(), Some(Error::CropOutOfBounds));
    let rect = ImageRectangle { x: 0, y: 0, width: 0, height: 100 };
    assert_eq!(make_thumbnail(&png(800, 400), Some(rect)).err(), Some(Error::CropOutOfBounds));
    let rect = ImageRectangle { x: u32::MAX, y: 0, width: 2, height: 1 };
    assert_eq!(make_thumbnail(&png(8, 4), Some(rect)).err(), Some(Error::CropOutOfBounds));
}

#[test]
fn undecodable_bytes_are_refused() {
    assert_eq!(make_thumbnail(b"not an image", None).err(), Some(Error::ImageDecode));
}

#[test]
fn traversal_out_of_the_image_root_is_refused() {
    let files = StaticFiles::new("/srv/site");
    let r = files.save_image("../../etc/passwd", vec![1, 2, 3]);
    assert_eq!(r.err(), Some(Error::InvalidPath));
    assert_eq!(files.get_image_path("../thumbs/x.png").err(), Some(Error::InvalidPath));
    assert_eq!(files.get_image_path("/etc/passwd").err(), Some(Error::InvalidPath));
    assert_eq!(files.get_style_path("").err(), Some(Error::InvalidPath));
}

#[test]
fn names_inside_the_roots_resolve() {
    let files = StaticFiles::new("/srv/site");
    assert_eq!(files.root(Root::Images), "/srv/site/images");
    assert_eq!(files.root(Root::Js), "/srv/site/js");
    let w = files.save_image("abc.png", vec![7, 8]).unwrap();
    assert_eq!(w.path, "/srv/site/images/abc.png");
    assert_eq!(w.bytes, vec![7, 8]);
    assert_eq!(files.get_thumb_path("./a/../b.jpg").unwrap(), "/srv/site/thumbs/b.jpg");
    assert_eq!(files.get_js_path("lib/app.js").unwrap(), "/srv/site/js/lib/app.js");
    assert_eq!(files.get_style_path("main.css").unwrap(), "/srv/site/styles/main.css");
    assert_eq!(path_under("/", "x").unwrap(), "/x");
}

#[test]
fn resolved_directories_are_confirmed_against_the_root() {
    let files = StaticFiles::new("/srv/site");
    assert_eq!(files.confirm_within(Root::Images, "/srv/site/images"), Ok(()));
    assert_eq!(files.confirm_within(Root::Images, "/srv/site/images/sub"), Ok(()));
    assert_eq!(files.confirm_within(Root::Images, "/srv/site/imagesx"), Err(Error::InvalidPath));
    assert_eq!(files.confirm_within(Root::Thumbs, "/etc"), Err(Error::InvalidPath));
}

#[test]
fn thumbnails_are_encoded_by_extension() {
    let files = StaticFiles::new("/srv/site");
    let t = make_thumbnail(&png(40, 20), None).unwrap();
    let w = files.save_thumb("t.png", &t).unwrap();
    assert_eq!(w.path, "/srv/site/thumbs/t.png");
    assert_eq!(&w.bytes[1..4], b"PNG");
    let back = make_thumbnail(&w.bytes, None).unwrap();
    assert_eq!((back.width(), back.height()), (400, 200));
    assert_eq!(files.save_thumb("t.unknown", &t).err(), Some(Error::ImageEncode));
    assert_eq!(files.save_thumb("../t.png", &t).err(), Some(Error::InvalidPath));
}

#[test]
fn image_store_checks_names_too() {
    let store = ImageStore::new("/data/up");
    assert_eq!(store.base_dir, "/data/up");
    assert_eq!(store.save_image("a.jpg", vec![]).unwrap().path, "/data/up/a.jpg");
    assert_eq!(store.save_image("../a.jpg", vec![]).err(), Some(Error::InvalidPath));
}

#[test]
fn relative_or_empty_roots_allow_nothing() {
    let empty = ImageStore::new("");
    assert_eq!(empty.save_image("../../etc/passwd", vec![1]).err(), Some(Error::InvalidPath));
    assert_eq!(empty.save_image("a.png", vec![1]).err(), Some(Error::InvalidPath));
    let relative = ImageStore::new("uploads");
    assert_eq!(relative.save_image("a.png", vec![1]).err(), Some(Error::InvalidPath));
    let files = StaticFiles::new("site");
    assert_eq!(files.get_image_path("a.png").err(), Some(Error::InvalidPath));
    assert_eq!(path_under("", "x").err(), Some(Error::InvalidPath));
    assert!(!is_within("r/s", "r/s/t"));
    assert!(!is_within("/r/s", "r/s/t"));
}

#[test]
fn upload_names_take_the_extension() {
    assert_eq!(upload_extension("Photo.PNG"), ".png");
    assert_eq!(upload_extension("photo.jpeg"), ".jpg");
    assert_eq!(upload_extension("photo.JpG"), ".jpg");
    assert_eq!(upload_extension("photo.gif"), "");
    assert_eq!(upload_extension("png"), ".png");
    assert_eq!(upload_filename("abc", "x.png"), "abc.png");
    let name = new_upload_filename("holiday.jpeg");
    assert_eq!(name.len(), 40);
    assert!(name.ends_with(".jpg"));
    assert!(name[..36].chars().all(|c| c.is_ascii_hexdigit() && !c.is_ascii_uppercase() || c == '-'));
    let files = StaticFiles::new("/srv/site");
    assert!(files.save_image(&name, vec![]).is_ok());
    assert_ne!(new_upload_filename("a.png"), new_upload_filename("a.png"));
}

#[test]
fn paths_are_normalised_lexically() {
    assert_eq!(components_of("/a//b/./c/../d/"), vec!["a".to_string(), "b".to_string(), "d".to_string()]);
    assert_eq!(components_of("/../x"), vec!["x".to_string()]);
    assert!(components_of("").is_empty());
    assert_eq!(render(&components_of("a/b")), "/a/b");
    assert_eq!(join("/r", "f"), "/r/f");
    assert_eq!(join("/r", "/f"), "/f");
    assert_eq!(resolve_inside("/r/s", "t/../u.png"), Some("/r/s/u.png".to_string()));
    assert_eq!(resolve_inside("/r/s", "../../etc/passwd"), None);
    assert_eq!(resolve_inside("/r/s", ".."), None);
    assert!(is_within("/r/s", "/r/s/t"));
    assert!(!is_within("/r/s", "/r"));
}
