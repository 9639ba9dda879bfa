use lgp_iot_db::errors::PkgError;

#[test]
fn new_keeps_kind_and_message() {
    let error = PkgError::new(String::from("pkg"), String::from("frame too short"));
    assert_eq!(error.kind(), "pkg");
    assert_eq!(error.message(), "frame too short");
}

#[test]
fn a_package_error_shows_kind_and_message() {
    let error = PkgError::new(String::from("pkg"), String::from("frame too short"));
    assert_eq!(error.to_string(), "Packcage Error:{Kind: pkg, Message: frame too short}");
    let empty = PkgError::new(String::from("pkg"), String::new());
    assert_eq!(empty.to_string(), "Packcage Error:{Kind: pkg, Message: }");
}

#[test]
fn any_other_error_shows_an_apology() {
    for kind in ["io", "parse", "", "PKG", "pkg ", "pk"] {
        let error = PkgError::new(String::from(kind), String::from("details"));
        assert_eq!(error.to_string(), "Sorry, something is wrong! Please Try Again!");
    }
}

#[test]
fn an_io_error_becomes_an_error_of_kind_io() {
    let source = std::io::Error::new(std::io::ErrorKind::NotFound, "no such frame");
    let shown = source.to_string();
    let error = PkgError::from(source);
    assert_eq!(error.kind(), "io");
    assert_eq!(error.message(), shown);
    assert_eq!(error.message(), "no such frame");
    assert_eq!(error.to_string(), "Sorry, something is wrong! Please Try Again!");
}

#[test]
fn a_parse_error_becomes_an_error_of_kind_parse() {
    let source = "12a".parse::<i32>().unwrap_err();
    let shown = source.to_string();
    let error: PkgError = source.into();
    assert_eq!(error.kind(), "parse");
    assert_eq!(error.message(), shown);
    assert_eq!(error.message(), "invalid digit found in string");
}

#[test]
fn errors_convert_with_the_question_mark() {
    fn parse(text: &str) -> Result<i32, PkgError> {
        Ok(text.parse::<i32>()?)
    }
    assert_eq!(parse("42").unwrap(), 42);
    assert_eq!(parse("").unwrap_err().kind(), "parse");
}
