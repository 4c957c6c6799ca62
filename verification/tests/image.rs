use tinyfeeds::image::{image_from_bytes, resolve_image_url, ImageRequests};

#[test]
fn relative_images_resolve_against_the_story() {
    assert_eq!(
        resolve_image_url("img/a.png", Some("https://site.org/posts/one".to_string())),
        "https://site.org/posts/img/a.png"
    );
    assert_eq!(
        resolve_image_url("/a.png", Some("https://site.org/posts/one".to_string())),
        "https://site.org/a.png"
    );
    assert_eq!(
        resolve_image_url("https://cdn.net/b.jpg", Some("https://site.org/x".to_string())),
        "https://cdn.net/b.jpg"
    );
    assert_eq!(resolve_image_url("img/a.png", Some("not a url".to_string())), "img/a.png");
    assert_eq!(resolve_image_url("img/a.png", None), "img/a.png");
}

#[test]
fn svg_is_told_by_its_start() {
    assert!(image_from_bytes("u".into(), b"<svg xmlns=''/>".to_vec()).is_svg);
    assert!(!image_from_bytes("u".into(), b"<svg>".to_vec()).is_svg);
    assert!(!image_from_bytes("u".into(), vec![0x89, b'P', b'N', b'G', 0, 0]).is_svg);
    let img = image_from_bytes("u".into(), vec![1, 2, 3]);
    assert_eq!((img.url.as_str(), img.bytes), ("u", vec![1, 2, 3]));
}

#[test]
fn each_image_is_requested_once() {
    let mut r = ImageRequests::new();
    assert!(r.request("a"));
    assert!(r.request("b"));
    assert!(!r.request("a"));
    assert_eq!(r.urls.len(), 2);
    r.clear();
    assert!(r.request("a"));
}
