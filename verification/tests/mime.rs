use bagger::mime::{extension_of, Mime};

#[test]
fn a_media_type_parses_into_its_parts() {
    let mime = Mime::parse("text/plain").unwrap();
    assert_eq!(mime.top, "text");
    assert_eq!(mime.sub, "plain");
    assert!(mime.is_text());
}

#[test]
fn parsing_lowers_the_case_and_drops_parameters() {
    let mime = Mime::parse("Image/SVG+xml; charset=utf-8").unwrap();
    assert_eq!(mime.top, "image");
    assert_eq!(mime.sub, "svg");
    assert!(!mime.is_text());
}

#[test]
fn what_is_no_media_type_does_not_parse() {
    assert_eq!(Mime::parse("nonsense"), None);
    assert_eq!(Mime::parse(""), None);
    assert_eq!(Mime::parse("/plain"), None);
}

#[test]
fn the_extension_of_a_path_suggests_its_media_type() {
    let text = Mime::guess("./tests/hello.txt");
    assert_eq!((text.top.as_str(), text.sub.as_str()), ("text", "plain"));
    let png = Mime::guess("./tests/tiny.png");
    assert_eq!((png.top.as_str(), png.sub.as_str()), ("image", "png"));
    assert!(!png.is_text());
}

#[test]
fn a_path_without_a_known_extension_is_binary() {
    let unknown = Mime::guess("./tests/data");
    assert_eq!(
        (unknown.top.as_str(), unknown.sub.as_str()),
        ("application", "octet-stream")
    );
    assert_eq!(unknown.duplicate(), unknown);
}

#[test]
fn a_declared_media_type_goes_before_a_guessed_one() {
    let text = Mime::parse("text/plain").unwrap();
    let png = Mime::guess("a.png");
    assert_eq!(Mime::first_of(Some(text.duplicate()), png.duplicate()), text);
    assert_eq!(Mime::first_of(None, png.duplicate()), png);
}

#[test]
fn the_extension_follows_the_last_dot_of_the_last_component() {
    assert_eq!(extension_of("./tests/hello.txt"), "txt");
    assert_eq!(extension_of("archive.tar.gz"), "gz");
    assert_eq!(extension_of("a.d/data"), "");
    assert_eq!(extension_of("a.d/data.PNG"), "PNG");
    assert_eq!(extension_of(".bashrc"), "");
    assert_eq!(extension_of("dir/.bashrc"), "");
    assert_eq!(extension_of("dir/.config.toml"), "toml");
    assert_eq!(extension_of("name."), "");
    assert_eq!(extension_of("a.png/"), "");
    assert_eq!(extension_of(""), "");
    assert_eq!(extension_of("é.txt"), "txt");
}

#[test]
fn a_path_is_guessed_by_its_extension_alone() {
    assert_eq!(Mime::guess("A.PNG"), Mime::guess("x/y.png"));
    assert_eq!(Mime::guess("a.png\\"), Mime::octet_stream());
    assert_eq!(Mime::guess("a.png/"), Mime::octet_stream());
    assert_eq!(Mime::known_or_octet_stream(None), Mime::octet_stream());
    let text = Mime::parse("text/plain").unwrap();
    assert_eq!(Mime::known_or_octet_stream(Some(text.duplicate())), text);
    assert_eq!(Mime::octet_stream().top, "application");
    assert_eq!(Mime::octet_stream().sub, "octet-stream");
}
