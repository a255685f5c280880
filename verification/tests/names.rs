use bagger::grab::{Name, Uid, UrlError};

#[test]
fn a_url_is_an_absolute_name() {
    assert_eq!(
        Name::new("http://example.com/a.png"),
        Ok(Name::Absolute("http://example.com/a.png".to_string()))
    );
    assert_eq!(
        Name::new("HTTP://Example.com"),
        Ok(Name::Absolute("http://example.com/".to_string()))
    );
}

#[test]
fn a_relative_url_is_a_relative_name() {
    assert_eq!(
        Name::new("images/a.png"),
        Ok(Name::Relative("images/a.png".to_string()))
    );
}

#[test]
fn a_faulty_url_is_no_name() {
    assert!(matches!(Name::new("http://[::1"), Err(UrlError::Invalid(_))));
    assert_eq!(
        Name::new("http://example.com:99999/"),
        Err(UrlError::Invalid("invalid port number".to_string()))
    );
}

#[test]
fn a_name_is_made_from_what_parsing_gave() {
    assert_eq!(
        Name::from_parsed(Ok("http://a/".to_string()), "http://a"),
        Ok(Name::Absolute("http://a/".to_string()))
    );
    assert_eq!(
        Name::from_parsed(Err(UrlError::RelativeUrlWithoutBase), "a/b"),
        Ok(Name::Relative("a/b".to_string()))
    );
    assert_eq!(
        Name::from_parsed(Err(UrlError::Invalid("empty host".to_string())), "http://"),
        Err(UrlError::Invalid("empty host".to_string()))
    );
}

#[test]
fn a_relative_name_is_joined_to_its_base() {
    let name = Name::Relative("b/c.png".to_string());
    assert_eq!(
        name.within("http://example.com/a/"),
        Ok("http://example.com/a/b/c.png".to_string())
    );
    let name = Name::Absolute("http://other.org/x".to_string());
    assert_eq!(
        name.within("http://example.com/a/"),
        Ok("http://other.org/x".to_string())
    );
    let name = Name::Relative("b".to_string());
    assert_eq!(name.within("not a base"), Err(UrlError::RelativeUrlWithoutBase));
}

#[test]
fn a_file_name_is_a_file_url_or_a_relative_path() {
    assert_eq!(Name::file("foo.txt"), Name::Relative("foo.txt".to_string()));
    assert_eq!(
        Name::from_file_url(Some("file:///tmp/foo.txt".to_string()), "/tmp/foo.txt"),
        Name::Absolute("file:///tmp/foo.txt".to_string())
    );
    assert_eq!(
        Name::from_file_url(None, "foo.txt"),
        Name::Relative("foo.txt".to_string())
    );
    assert!(matches!(Name::file("/tmp/foo.txt"), Name::Absolute(url) if url.starts_with("file://")));
}

#[test]
fn uids_compare_by_both_numbers() {
    assert_eq!(Uid(1, 2), Uid(1, 2));
    assert!(Uid(1, 2) < Uid(1, 3));
    assert!(Uid(0, 9) < Uid(1, 0));
}
