use bagger::error::Error;
use bagger::flag::{Flag, Flags};

#[test]
fn each_error_has_its_words() {
    let mut flags = Flags::new();
    let flag = Flag::from_str(&mut flags, "include");
    let text = |e: Error| e.message(&flags);
    assert_eq!(text(Error::Stopped("file content is not text".to_string())), "file content is not text");
    assert_eq!(text(Error::Forbidden(flag)), "no solution without flag \"include\"");
    assert_eq!(text(Error::Missing(flag)), "no solution with flag \"include\"");
    assert_eq!(text(Error::Exhausted), "no solution (try adding more bagger plugins!)");
    assert_eq!(text(Error::BacktraceLoop), "backtrace loop");
    assert_eq!(text(Error::Cast), "could not cast edge");
    assert_eq!(text(Error::Io("No such file".to_string())), "No such file");
    assert_eq!(text(Error::NotUtf8), "stream did not contain valid UTF-8");
    assert_eq!(text(Error::NotABag("Clone".to_string())), "trait \"Clone\" is not a bag");
    assert_eq!(text(Error::NoTrait), "bag trait is missing");
    assert_eq!(
        text(Error::NoParameter("Bag".to_string())),
        "\"Bag\" must take have a type parameter"
    );
    assert_eq!(
        text(Error::TooManyParameters("Bag".to_string())),
        "\"Bag\" has too many type parameters"
    );
    assert_eq!(
        text(Error::NotAType("'a".to_string(), "Bag".to_string())),
        "parameter \"'a\" on \"Bag\" is not a type"
    );
    assert_eq!(text(Error::NotAList), "target is not a plus-deliniated list of traits");
}

#[test]
fn a_flag_of_another_registry_has_no_name() {
    let mut flags = Flags::new();
    let flag = Flag::from_str(&mut flags, "include");
    let other = Flags::new();
    assert_eq!(Error::Missing(flag).message(&other), "no solution with flag \"\"");
    assert_eq!(Error::Missing(flag).duplicate(), Error::Missing(flag));
}
